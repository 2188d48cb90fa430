use rnull::block::bio::{Bio, BioIterator, BioVec, BvecIter, Segment};
use rnull::block::bio::{REQ_OP_DISCARD, REQ_OP_READ};
use rnull::error::{Error, EINVAL};
use rnull::page::{Page, PAGE_SIZE};

fn pattern(seed: u8) -> Page {
    let mut page = Page::zeroed();
    let mut i = 0;
    while i < PAGE_SIZE {
        page.set_byte(i, (i as u8).wrapping_mul(31).wrapping_add(seed));
        i += 1;
    }
    page
}

fn entry(pages: usize, offset: u32, len: u32, seed: u8) -> BioVec {
    let mut bv_pages = Vec::new();
    for i in 0..pages {
        bv_pages.push(pattern(seed.wrapping_add(i as u8)));
    }
    BioVec { bv_pages, bv_len: len, bv_offset: offset }
}

fn bio(entries: Vec<BioVec>, opf: u32) -> Bio {
    let size = entries.iter().map(|e| e.bv_len).sum();
    Bio {
        bi_io_vec: entries,
        bi_iter: BvecIter { bi_sector: 8, bi_size: size, bi_idx: 0, bi_bvec_done: 0 },
        bi_opf: opf,
    }
}

fn bytes(page: &Page, from: usize, to: usize) -> Vec<u8> {
    (from..to).map(|i| page.byte(i)).collect()
}

#[test]
fn segment_reports_its_range() {
    let mut page = Page::zeroed();
    let segment = Segment { bv_page: &mut page, bv_len: 100, bv_offset: 28 };
    assert_eq!(segment.len(), 100);
    assert_eq!(segment.offset(), 28);
    assert!(!segment.is_empty());
    let mut page = Page::zeroed();
    let segment = Segment { bv_page: &mut page, bv_len: 0, bv_offset: 28 };
    assert!(segment.is_empty());
}

#[test]
fn advance_moves_offset_and_length() {
    let mut page = Page::zeroed();
    let mut segment = Segment { bv_page: &mut page, bv_len: 100, bv_offset: 28 };
    assert_eq!(segment.advance(40), Ok(()));
    assert_eq!((segment.offset(), segment.len()), (68, 60));
    assert_eq!(segment.advance(61), Err(Error(EINVAL)));
    assert_eq!((segment.offset(), segment.len()), (68, 60));
    assert_eq!(segment.advance(60), Ok(()));
    assert!(segment.is_empty());
}

#[test]
fn copy_to_page_stops_at_the_end_of_the_target() {
    let mut source = pattern(3);
    let expected = bytes(&source, 16, 528);
    let mut target = Page::zeroed();
    let mut segment = Segment { bv_page: &mut source, bv_len: 1000, bv_offset: 16 };
    assert_eq!(segment.copy_to_page(&mut target, 3584), 512);
    assert_eq!((segment.offset(), segment.len()), (528, 488));
    assert_eq!(bytes(&target, 3584, 4096), expected);
    assert_eq!(bytes(&target, 0, 3584), vec![0; 3584]);
}

#[test]
fn copy_to_page_stops_at_the_end_of_the_segment() {
    let mut source = pattern(3);
    let expected = bytes(&source, 4000, 4096);
    let mut target = Page::zeroed();
    let mut segment = Segment { bv_page: &mut source, bv_len: 96, bv_offset: 4000 };
    assert_eq!(segment.copy_to_page(&mut target, 0), 96);
    assert!(segment.is_empty());
    assert_eq!(bytes(&target, 0, 96), expected);
    assert_eq!(bytes(&target, 96, 4096), vec![0; 4000]);
}

#[test]
fn copy_from_page_fills_the_segment() {
    let source = pattern(7);
    let mut page = Page::zeroed();
    let mut segment = Segment { bv_page: &mut page, bv_len: 512, bv_offset: 1024 };
    assert_eq!(segment.copy_from_page(&source, 3840), 256);
    assert_eq!((segment.offset(), segment.len()), (1280, 256));
    assert_eq!(bytes(&page, 1024, 1280), bytes(&source, 3840, 4096));
    assert_eq!(bytes(&page, 0, 1024), vec![0; 1024]);
    assert_eq!(bytes(&page, 1280, 4096), vec![0; 2816]);
}

#[test]
fn zero_page_clears_the_segment_only() {
    let mut page = pattern(1);
    let untouched = pattern(1);
    let mut segment = Segment { bv_page: &mut page, bv_len: 300, bv_offset: 100 };
    assert_eq!(segment.zero_page(), 300);
    assert!(segment.is_empty());
    assert_eq!(bytes(&page, 100, 400), vec![0; 300]);
    assert_eq!(bytes(&page, 0, 100), bytes(&untouched, 0, 100));
    assert_eq!(bytes(&page, 400, 4096), bytes(&untouched, 400, 4096));
}

#[test]
fn segment_text() {
    let mut page = Page::zeroed();
    let segment = Segment { bv_page: &mut page, bv_len: 512, bv_offset: 1024 };
    assert_eq!(segment.fmt(0xabc0), b"Segment 0xabc0 len: 512, offset: 1024".to_vec());
}

#[test]
fn bio_text() {
    let b = Bio {
        bi_io_vec: vec![entry(1, 0, 512, 0), entry(1, 0, 512, 0)],
        bi_iter: BvecIter { bi_sector: 0, bi_size: 700, bi_idx: 1, bi_bvec_done: 26 },
        bi_opf: REQ_OP_READ,
    };
    assert_eq!(b.io_vec_count(), 2);
    assert_eq!(
        b.fmt(0x1f),
        b"Bio(0x1f, vcnt: 2, idx: 1, size: 0x2bc, completed: 0x1a)".to_vec()
    );
}

#[test]
fn segments_are_the_bytes_of_the_bio_in_order() {
    let mut b = bio(vec![entry(3, 3000, 7000, 1), entry(1, 512, 1024, 50)], REQ_OP_READ);
    let mut expected = Vec::new();
    for v in &b.bi_io_vec {
        for at in v.bv_offset as usize..(v.bv_offset + v.bv_len) as usize {
            expected.push(v.bv_pages[at / PAGE_SIZE].byte(at % PAGE_SIZE));
        }
    }
    let mut shape = Vec::new();
    let mut got = Vec::new();
    let mut iter = b.segment_iter();
    while let Some(segment) = iter.next() {
        shape.push((segment.offset(), segment.len()));
        let from = segment.offset();
        got.extend(bytes(segment.bv_page, from, from + segment.len() as usize));
    }
    assert_eq!(shape, vec![(3000, 1096), (0, 4096), (0, 1808), (512, 1024)]);
    assert_eq!(got, expected);
    assert_eq!(iter.iter.bi_size, 0);
    assert_eq!(iter.iter.bi_idx, 2);
    assert_eq!(iter.iter.bi_sector, 8 + 2 + 8 + 3 + 2);
}

#[test]
fn segments_start_at_the_position_of_the_bio() {
    let mut b = bio(vec![entry(1, 0, 4096, 1), entry(1, 0, 4096, 9)], REQ_OP_READ);
    b.bi_iter = BvecIter { bi_sector: 0, bi_size: 5000, bi_idx: 0, bi_bvec_done: 1024 };
    let mut iter = b.segment_iter();
    let first = iter.next().map(|s| (s.offset(), s.len()));
    let second = iter.next().map(|s| (s.offset(), s.len()));
    assert_eq!(first, Some((1024, 3072)));
    assert_eq!(second, Some((0, 1928)));
    assert!(iter.next().is_none());
}

#[test]
fn an_empty_entry_gives_an_empty_segment() {
    let entries = vec![entry(1, 8, 0, 1), entry(1, 0, 512, 9), entry(1, 16, 0, 1)];
    let mut b = bio(entries, REQ_OP_READ);
    let mut iter = b.segment_iter();
    assert_eq!(iter.next().map(|s| (s.offset(), s.len())), Some((8, 0)));
    assert_eq!(iter.next().map(|s| (s.offset(), s.len())), Some((0, 512)));
    assert!(iter.next().is_none());
}

#[test]
fn an_empty_bio_has_no_segments() {
    let mut b = bio(vec![], REQ_OP_READ);
    assert!(b.segment_iter().next().is_none());
}

#[test]
fn a_discard_does_not_walk_through_the_entries() {
    let mut b = bio(vec![entry(1, 0, 4096, 1)], REQ_OP_DISCARD);
    b.bi_iter.bi_size = 8192;
    let mut iter = b.segment_iter();
    assert_eq!(iter.next().map(|s| (s.offset(), s.len())), Some((0, 4096)));
    assert_eq!(iter.iter.bi_idx, 0);
    assert_eq!(iter.next().map(|s| (s.offset(), s.len())), Some((0, 4096)));
    assert!(iter.next().is_none());
}

#[test]
fn segments_write_through_to_the_bio() {
    let mut b = bio(vec![entry(1, 0, 1024, 1)], REQ_OP_READ);
    let mut iter = b.segment_iter();
    if let Some(mut segment) = iter.next() {
        segment.zero_page();
    }
    assert_eq!(bytes(&b.bi_io_vec[0].bv_pages[0], 0, 1024), vec![0; 1024]);
    assert_eq!(
        bytes(&b.bi_io_vec[0].bv_pages[0], 1024, 4096),
        bytes(&pattern(1), 1024, 4096)
    );
}

#[test]
fn bio_iterator_walks_the_chain() {
    let mut bios = vec![bio(vec![], 0), bio(vec![], 1), bio(vec![], 9)];
    let mut iter = BioIterator { bios: &mut bios, next: 0 };
    let mut ops = Vec::new();
    while let Some(b) = iter.next() {
        ops.push(b.bi_opf);
        b.bi_opf += 256;
    }
    assert_eq!(ops, vec![0, 1, 9]);
    assert_eq!(bios.iter().map(|b| b.bi_opf).collect::<Vec<u32>>(), vec![256, 257, 265]);
}

#[test]
fn page_operations() {
    let source = pattern(5);
    let mut page = Page::zeroed();
    page.copy_from(10, &source, 4000, 96);
    assert_eq!(bytes(&page, 10, 106), bytes(&source, 4000, 4096));
    page.fill_zero(20, 30);
    assert_eq!(bytes(&page, 20, 50), vec![0; 30]);
    assert_eq!(bytes(&page, 50, 106), bytes(&source, 4040, 4096));
}

#[test]
fn good_and_bad_bios_are_told_apart() {
    assert!(bio(vec![], REQ_OP_READ).is_valid());
    assert!(bio(vec![entry(2, 4000, 4192, 0)], REQ_OP_READ).is_valid());
    assert!(!bio(vec![entry(2, 4000, 4193, 0)], REQ_OP_READ).is_valid());
    assert!(bio(vec![entry(1, 0, 0, 0)], REQ_OP_READ).is_valid());
    assert!(bio(vec![entry(1, 4095, 0, 0)], REQ_OP_READ).is_valid());
    assert!(!bio(vec![entry(1, 4096, 0, 0)], REQ_OP_READ).is_valid());
    assert!(!bio(vec![entry(0, 0, 0, 0)], REQ_OP_READ).is_valid());
    let mut b = bio(vec![entry(1, 0, 0, 0), entry(1, 0, 512, 0)], REQ_OP_READ);
    assert!(b.is_valid());
    b.bi_opf = REQ_OP_DISCARD;
    assert!(!b.is_valid());
    let mut b = bio(vec![entry(1, 0, 512, 0), entry(1, 0, 512, 0)], REQ_OP_READ);
    assert!(b.is_valid());
    b.bi_iter.bi_size = 1025;
    assert!(!b.is_valid());
    b.bi_opf = REQ_OP_DISCARD;
    assert!(b.is_valid());
    b.bi_iter.bi_idx = 2;
    assert!(!b.is_valid());
    b.bi_iter = BvecIter { bi_sector: 0, bi_size: 513, bi_idx: 0, bi_bvec_done: 512 };
    assert!(!b.is_valid());
    b.bi_iter = BvecIter { bi_sector: 0, bi_size: 0, bi_idx: 9, bi_bvec_done: 9 };
    assert!(b.is_valid());
}
