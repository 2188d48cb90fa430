use rnull::block::bio::{Bio, BioVec, BvecIter, Segment};
use rnull::block::bio::{REQ_OP_READ, REQ_OP_WRITE, REQ_OP_WRITE_ZEROES};
use rnull::block::mq::request::{Request, RequestDataWrapper, RequestState, BLK_STS_OK};
use rnull::block::mq::Operations;
use rnull::error::{Error, ENOMEM};
use rnull::grants::Grants;
use rnull::page::{Page, PAGE_SIZE};
use rnull::rnull::configfs::IRQMode;
use rnull::rnull::tree::Tree;
use rnull::rnull::{NullBlkDevice, QueueData, TreeContainer};
use rnull::time::Ktime;
use rnull::types::{Refcount, URef};

fn plenty() -> Grants {
    Grants { left: 1000, refusal: Error(ENOMEM) }
}

fn filled(seed: u8) -> Page {
    let mut page = Page::zeroed();
    for i in 0..PAGE_SIZE {
        page.set_byte(i, (i / 7) as u8 ^ seed);
    }
    page
}

fn bytes(page: &Page, from: usize, to: usize) -> Vec<u8> {
    (from..to).map(|i| page.byte(i)).collect()
}

fn write_bytes(tree: &mut Tree, sector: usize, len: u32, page: &mut Page) {
    let segment = Segment { bv_page: page, bv_len: len, bv_offset: 0 };
    assert_eq!(NullBlkDevice::write(tree, sector, segment, &mut plenty()), Ok(()));
}

fn read_bytes(tree: &Tree, sector: usize, len: u32) -> Vec<u8> {
    let mut page = filled(0xff);
    let segment = Segment { bv_page: &mut page, bv_len: len, bv_offset: 0 };
    assert_eq!(NullBlkDevice::read(tree, sector, segment), Ok(()));
    bytes(&page, 0, len as usize)
}

#[test]
fn an_empty_device_reads_as_zeroes() {
    let tree = Tree::new();
    assert_eq!(read_bytes(&tree, 77, 4096), vec![0; 4096]);
}

#[test]
fn a_segment_reads_back_what_was_written() {
    let mut tree = Tree::new();
    let mut page = filled(9);
    write_bytes(&mut tree, 5, 4096, &mut page);
    assert_eq!(read_bytes(&tree, 5, 4096), bytes(&filled(9), 0, 4096));
    assert_eq!(bytes(&page, 0, 4096), bytes(&filled(9), 0, 4096));
    assert_eq!(read_bytes(&tree, 8, 512), bytes(&filled(9), 1536, 2048));
}

#[test]
fn a_write_leaves_other_sectors_alone() {
    let mut tree = Tree::new();
    write_bytes(&mut tree, 0, 4096, &mut filled(1));
    write_bytes(&mut tree, 2, 1024, &mut filled(2));
    assert_eq!(read_bytes(&tree, 0, 1024), bytes(&filled(1), 0, 1024));
    assert_eq!(read_bytes(&tree, 2, 1024), bytes(&filled(2), 0, 1024));
    assert_eq!(read_bytes(&tree, 4, 2048), bytes(&filled(1), 2048, 4096));
}

#[test]
fn a_segment_that_starts_in_an_absent_page_reads_the_pages_behind_it() {
    let mut tree = Tree::new();
    write_bytes(&mut tree, 8, 4096, &mut filled(3));
    let mut expected = vec![0; 2048];
    expected.extend(bytes(&filled(3), 0, 2048));
    assert_eq!(read_bytes(&tree, 4, 4096), expected);
    assert_eq!(read_bytes(&tree, 8, 2048), bytes(&filled(3), 0, 2048));
}

#[test]
fn a_segment_that_ends_in_an_absent_page_reads_the_page_before_it() {
    let mut tree = Tree::new();
    write_bytes(&mut tree, 8, 4096, &mut filled(3));
    let mut expected = bytes(&filled(3), 3584, 4096);
    expected.extend(vec![0; 512]);
    assert_eq!(read_bytes(&tree, 15, 1024), expected);
}

#[test]
fn a_sector_behind_one_that_was_never_written_is_read() {
    let mut tree = Tree::new();
    let mut page = Page::zeroed();
    for i in 0..512 {
        page.set_byte(i, 0xbb);
    }
    write_bytes(&mut tree, 8, 512, &mut page);
    let mut expected = vec![0; 512];
    expected.extend(vec![0xbb; 512]);
    assert_eq!(read_bytes(&tree, 7, 1024), expected);
}

#[test]
fn a_write_stops_where_no_page_can_be_had() {
    let mut tree = Tree::new();
    let mut grants = Grants { left: 1, refusal: Error(ENOMEM) };
    let mut page = filled(4);
    let segment = Segment { bv_page: &mut page, bv_len: 4096, bv_offset: 0 };
    assert_eq!(NullBlkDevice::write(&mut tree, 6, segment, &mut grants), Err(Error(ENOMEM)));
    assert_eq!(grants.left, 0);
    assert_eq!(read_bytes(&tree, 6, 1024), bytes(&filled(4), 0, 1024));
    assert!(tree.get(1).is_none());
}

#[test]
fn other_commands_transfer_nothing() {
    let mut tree = Tree::new();
    let mut page = filled(4);
    let segment = Segment { bv_page: &mut page, bv_len: 4096, bv_offset: 0 };
    let r = NullBlkDevice::transfer(REQ_OP_WRITE_ZEROES, &mut tree, 0, segment, &mut plenty());
    assert_eq!(r, Ok(()));
    let last = Segment { bv_page: &mut page, bv_len: 4096, bv_offset: 0 };
    let far = usize::MAX;
    let r = NullBlkDevice::transfer(REQ_OP_WRITE_ZEROES, &mut tree, far, last, &mut plenty());
    assert_eq!(r, Ok(()));
    assert!(tree.get(0).is_none());
    assert_eq!(bytes(&page, 0, 4096), bytes(&filled(4), 0, 4096));
}

fn bio(entries: Vec<BioVec>, opf: u32) -> Bio {
    let size = entries.iter().map(|e| e.bv_len).sum();
    Bio {
        bi_io_vec: entries,
        bi_iter: BvecIter { bi_sector: 0, bi_size: size, bi_idx: 0, bi_bvec_done: 0 },
        bi_opf: opf,
    }
}

fn request(command: u32, sector: u64, bios: Vec<Bio>) -> Request<NullBlkDevice> {
    Request {
        ptr: 0x1000,
        cmd_flags: 0x700 + command,
        sector,
        bios,
        state: RequestState::InFlight,
        wrapper: RequestDataWrapper {
            refcount: Refcount::new(0),
            data: NullBlkDevice::new_request_data(),
        },
    }
}

fn queue(irq_mode: IRQMode, memory_backed: bool) -> QueueData {
    QueueData {
        tree: TreeContainer::new(),
        irq_mode,
        completion_time: Ktime::from_nanos(10_000),
        memory_backed,
    }
}

fn submit(q: &mut QueueData, rq: &mut Request<NullBlkDevice>, remote: bool) {
    let r = NullBlkDevice::queue_rq(q, URef { obj: rq }, true, remote, &mut plenty());
    assert_eq!(r, Ok(()));
}

fn contents(rq: &Request<NullBlkDevice>) -> Vec<u8> {
    let mut out = Vec::new();
    for b in &rq.bios {
        for v in &b.bi_io_vec {
            for at in v.bv_offset as usize..(v.bv_offset + v.bv_len) as usize {
                out.push(v.bv_pages[at / PAGE_SIZE].byte(at % PAGE_SIZE));
            }
        }
    }
    out
}

#[test]
fn a_request_reads_back_what_was_written_however_it_is_laid_out() {
    let mut q = queue(IRQMode::Direct, true);
    let mut w = request(
        REQ_OP_WRITE,
        3,
        vec![
            bio(
                vec![
                    BioVec { bv_pages: vec![filled(1), filled(2)], bv_len: 4608, bv_offset: 1024 },
                    BioVec { bv_pages: vec![filled(3)], bv_len: 512, bv_offset: 512 },
                ],
                REQ_OP_WRITE,
            ),
            bio(
                vec![BioVec { bv_pages: vec![filled(4)], bv_len: 2048, bv_offset: 0 }],
                REQ_OP_WRITE,
            ),
        ],
    );
    submit(&mut q, &mut w, false);
    assert_eq!(w.state, RequestState::Ended(BLK_STS_OK));
    assert_eq!(w.wrapper_ref().refcount().load(), 0);
    let mut r = request(
        REQ_OP_READ,
        3,
        vec![bio(
            vec![BioVec { bv_pages: vec![filled(7), filled(8)], bv_len: 7168, bv_offset: 512 }],
            REQ_OP_READ,
        )],
    );
    submit(&mut q, &mut r, false);
    assert_eq!(contents(&r), contents(&w));
    assert_eq!(contents(&r).len(), 7168);
}

#[test]
fn a_device_without_memory_transfers_nothing() {
    let mut q = queue(IRQMode::Direct, false);
    let entries = vec![BioVec { bv_pages: vec![filled(7)], bv_len: 4096, bv_offset: 0 }];
    let mut r = request(REQ_OP_READ, 0, vec![bio(entries, REQ_OP_READ)]);
    submit(&mut q, &mut r, false);
    assert_eq!(contents(&r), bytes(&filled(7), 0, 4096));
    assert_eq!(r.state, RequestState::Ended(BLK_STS_OK));
}

#[test]
fn a_request_that_fails_is_left_unreferenced() {
    let mut q = queue(IRQMode::Direct, true);
    let entries =
        vec![BioVec { bv_pages: vec![filled(7), filled(8)], bv_len: 8192, bv_offset: 0 }];
    let mut w = request(REQ_OP_WRITE, 0, vec![bio(entries, REQ_OP_WRITE)]);
    let mut grants = Grants { left: 1, refusal: Error(ENOMEM) };
    let r = NullBlkDevice::queue_rq(&mut q, URef { obj: &mut w }, false, false, &mut grants);
    assert_eq!(r, Err(Error(ENOMEM)));
    assert_eq!(w.wrapper_ref().refcount().load(), 1);
    assert_eq!(w.state, RequestState::InFlight);
    assert!(q.tree.tree.get(0).is_some());
    assert!(q.tree.tree.get(1).is_none());
}

#[test]
fn soft_mode_completes_the_request_here_or_elsewhere() {
    let mut q = queue(IRQMode::Soft, false);
    let mut here = request(REQ_OP_READ, 0, vec![]);
    submit(&mut q, &mut here, false);
    assert_eq!(here.state, RequestState::Ended(BLK_STS_OK));
    assert_eq!(here.wrapper_ref().refcount().load(), 0);
    let mut elsewhere = request(REQ_OP_READ, 0, vec![]);
    submit(&mut q, &mut elsewhere, true);
    assert_eq!(elsewhere.state, RequestState::Complete);
    assert_eq!(elsewhere.wrapper_ref().refcount().load(), 2);
}

#[test]
fn timer_mode_starts_the_timer_of_the_request() {
    let mut q = queue(IRQMode::Timer, false);
    let mut rq = request(REQ_OP_READ, 0, vec![]);
    submit(&mut q, &mut rq, false);
    assert_eq!(rq.state, RequestState::InFlight);
    assert_eq!(rq.wrapper_ref().refcount().load(), 1);
    let expiry = rq.data_ref().timer.timer.expiry;
    assert_eq!(expiry.map(|e| (e.tim, e.delta_ns, e.mode)), Some((10_000, 0, 1)));
    NullBlkDevice::commit_rqs(&q);
}

#[test]
fn unaligned_lengths_round_down_to_sectors() {
    let mut tree = Tree::new();
    let mut grants = plenty();
    let mut b = bio(
        vec![
            BioVec { bv_pages: vec![filled(1)], bv_len: 700, bv_offset: 0 },
            BioVec { bv_pages: vec![filled(2)], bv_len: 512, bv_offset: 0 },
        ],
        REQ_OP_WRITE,
    );
    assert_eq!(NullBlkDevice::transfer_bio(REQ_OP_WRITE, &mut tree, 0, &mut b, &mut grants), Ok(2));
    assert_eq!(read_bytes(&tree, 0, 512), bytes(&filled(1), 0, 512));
    assert_eq!(read_bytes(&tree, 1, 512), bytes(&filled(2), 0, 512));
}

#[test]
fn a_write_needs_memory_for_the_absent_pages_only() {
    let mut q = queue(IRQMode::Direct, true);
    let pages = |seed: u8| vec![filled(seed), filled(seed + 1), filled(seed + 2)];
    let entry = |seed: u8| vec![BioVec { bv_pages: pages(seed), bv_len: 12288, bv_offset: 0 }];
    let middle = vec![BioVec { bv_pages: vec![filled(9)], bv_len: 4096, bv_offset: 0 }];
    let mut first = request(REQ_OP_WRITE, 16, vec![bio(middle, REQ_OP_WRITE)]);
    submit(&mut q, &mut first, false);
    let mut w = request(REQ_OP_WRITE, 8, vec![bio(entry(1), REQ_OP_WRITE)]);
    let mut grants = Grants { left: 2, refusal: Error(ENOMEM) };
    let r = NullBlkDevice::queue_rq(&mut q, URef { obj: &mut w }, true, false, &mut grants);
    assert_eq!((r, grants.left), (Ok(()), 0));
    let mut again = request(REQ_OP_WRITE, 8, vec![bio(entry(5), REQ_OP_WRITE)]);
    let r = NullBlkDevice::queue_rq(&mut q, URef { obj: &mut again }, true, false, &mut grants);
    assert_eq!((r, grants.left), (Ok(()), 0));
    let mut beyond = request(REQ_OP_WRITE, 25, vec![bio(entry(1), REQ_OP_WRITE)]);
    let r = NullBlkDevice::queue_rq(&mut q, URef { obj: &mut beyond }, true, false, &mut grants);
    assert_eq!(r, Err(Error(ENOMEM)));
}

#[test]
fn requests_to_an_empty_device() {
    let mut q = queue(IRQMode::Direct, true);
    let entry = || vec![BioVec { bv_pages: vec![filled(3)], bv_len: 1024, bv_offset: 512 }];
    let mut r = request(REQ_OP_READ, 40, vec![bio(entry(), REQ_OP_READ)]);
    submit(&mut q, &mut r, false);
    assert_eq!(contents(&r), vec![0; 1024]);
    let mut other = request(REQ_OP_WRITE_ZEROES, 40, vec![bio(entry(), REQ_OP_WRITE_ZEROES)]);
    submit(&mut q, &mut other, false);
    assert_eq!(contents(&other), bytes(&filled(3), 512, 1536));
    assert!(q.tree.tree.get(5).is_none());
}

#[test]
fn the_last_segment_need_not_be_made_of_whole_sectors() {
    let mut q = queue(IRQMode::Direct, true);
    let whole = vec![BioVec { bv_pages: vec![filled(5)], bv_len: 700, bv_offset: 100 }];
    let mut w = request(REQ_OP_WRITE, 7, vec![bio(whole, REQ_OP_WRITE)]);
    submit(&mut q, &mut w, false);
    let parts = vec![
        BioVec { bv_pages: vec![filled(1)], bv_len: 512, bv_offset: 0 },
        BioVec { bv_pages: vec![filled(2)], bv_len: 188, bv_offset: 3 },
    ];
    let mut r = request(REQ_OP_READ, 7, vec![bio(parts, REQ_OP_READ), bio(vec![], REQ_OP_READ)]);
    submit(&mut q, &mut r, false);
    assert_eq!(contents(&r), contents(&w));
}
