use rnull::block::bio::{Bio, BvecIter};
use rnull::block::mq::request::{DropStep, Request, RequestDataWrapper, RequestLayout, RequestState};
use rnull::block::mq::request::BLK_STS_OK;
use rnull::block::mq::{CompleteOperation, Operations};
use rnull::error::{Error, ENOMEM};
use rnull::grants::Grants;
use rnull::rnull::configfs::IRQMode;
use rnull::rnull::{NullBlkDevice, QueueData, TreeContainer};
use rnull::time::hrtimer::{HasHrTimer, HrTimer, HrTimerCallback, HrTimerHandle, HrTimerPointer};
use rnull::time::hrtimer::{HrTimerRestart, RawHrTimerCallback, CLOCK_MONOTONIC, HRTIMER_NORESTART};
use rnull::time::Ktime;
use rnull::types::{ARef, RefCounted, Refcount, URef, UniqueRefCounted};

fn request(count: i32) -> Request<NullBlkDevice> {
    Request {
        ptr: 0x4000,
        cmd_flags: 0xabcd_0109,
        sector: 99,
        bios: vec![],
        state: RequestState::Idle,
        wrapper: RequestDataWrapper {
            refcount: Refcount::new(count),
            data: NullBlkDevice::new_request_data(),
        },
    }
}

fn count(rq: &Request<NullBlkDevice>) -> i32 {
    rq.wrapper_ref().refcount().load()
}

fn aref() -> ARef<Request<NullBlkDevice>> {
    Request::<NullBlkDevice>::aref_from_raw(0x4000)
}

#[test]
fn command_and_sector() {
    let rq = request(0);
    assert_eq!(rq.command(), 9);
    assert_eq!(rq.sector(), 99);
    assert!(rq.bio().is_none());
}

#[test]
fn the_first_bio_can_be_had_and_changed() {
    let mut rq = request(0);
    assert!(rq.bio_mut().is_none());
    let iter = BvecIter { bi_sector: 4, bi_size: 0, bi_idx: 0, bi_bvec_done: 0 };
    rq.bios.push(Bio { bi_io_vec: vec![], bi_iter: iter, bi_opf: 1 });
    rq.bios.push(Bio { bi_io_vec: vec![], bi_iter: iter, bi_opf: 2 });
    assert_eq!(rq.bio().map(|b| b.bi_opf), Some(1));
    if let Some(b) = rq.bio_mut() {
        b.bi_opf = 7;
    }
    assert_eq!((rq.bios[0].bi_opf, rq.bios[1].bi_opf), (7, 2));
    let mut n = 0;
    let mut iter = rq.bio_iter_mut();
    while let Some(b) = iter.next() {
        b.bi_opf = 0;
        n += 1;
    }
    assert_eq!(n, 2);
    assert_eq!((rq.bios[0].bi_opf, rq.bios[1].bi_opf), (0, 0));
}

#[test]
fn counts_of_references() {
    let mut rq = request(0);
    let shared = UniqueRefCounted::unique_to_shared(URef { obj: &mut rq });
    assert_eq!(ARef::into_raw(shared), 0x4000);
    assert_eq!(count(&rq), 2);
    rq.inc_ref();
    assert_eq!(count(&rq), 3);
    assert!(UniqueRefCounted::try_shared_to_unique(aref(), &mut rq).is_err());
    assert_eq!(count(&rq), 3);
    RefCounted::dec_ref(&mut rq);
    assert_eq!(count(&rq), 2);
    assert!(UniqueRefCounted::try_shared_to_unique(aref(), &mut rq).is_ok());
    assert_eq!(count(&rq), 0);
    UniqueRefCounted::dec_ref(&mut rq);
    assert_eq!(count(&rq), 1);
}

#[test]
fn into_unique_or_drop() {
    let mut rq = request(3);
    assert!(aref().into_unique_or_drop(&mut rq).is_none());
    assert_eq!(count(&rq), 2);
    assert!(aref().into_unique_or_drop(&mut rq).is_some());
    assert_eq!(count(&rq), 0);
}

#[test]
fn drop_steps_follow_the_count_that_is_seen() {
    assert_eq!(DropStep::exchange(2), DropStep::Exchange { current: 2, new: 0 });
    assert_eq!(DropStep::exchange(5), DropStep::Exchange { current: 5, new: 4 });
    assert_eq!(DropStep::next(5, Err(2)), DropStep::Exchange { current: 2, new: 0 });
    assert_eq!(DropStep::next(2, Err(3)), DropStep::Exchange { current: 3, new: 2 });
    assert_eq!(DropStep::next(2, Ok(2)), DropStep::Done { unique: true });
    assert_eq!(DropStep::next(3, Ok(3)), DropStep::Done { unique: false });
}

#[test]
fn refcount_operations() {
    let mut c = Refcount::new(i32::MAX);
    assert_eq!(c.fetch_add(1), i32::MAX);
    assert_eq!(c.load(), i32::MIN);
    assert_eq!(c.fetch_sub(1), i32::MIN);
    assert_eq!(c.swap(2), i32::MAX);
    assert_eq!(c.compare_exchange(3, 0), Err(2));
    assert_eq!(c.compare_exchange(2, 0), Ok(2));
    assert_eq!(c.load(), 0);
}

#[test]
fn starting_and_ending() {
    let mut rq = request(0);
    let mut unique = URef { obj: &mut rq };
    unique.start_unchecked();
    assert_eq!(unique.obj.state, RequestState::InFlight);
    unique.end(10);
    assert_eq!(rq.state, RequestState::Ended(10));
    URef { obj: &mut rq }.end_ok();
    assert_eq!(rq.state, RequestState::Ended(0));
}

#[test]
fn completing_a_request() {
    let mut rq = request(2);
    Request::complete(aref(), &mut rq, true);
    assert_eq!((rq.state, count(&rq)), (RequestState::Complete, 2));
    NullBlkDevice::complete(aref(), &mut rq);
    assert_eq!((rq.state, count(&rq)), (RequestState::Ended(BLK_STS_OK), 0));
    let mut rq = request(2);
    Request::complete(aref(), &mut rq, false);
    assert_eq!((rq.state, count(&rq)), (RequestState::Ended(BLK_STS_OK), 0));
}

#[test]
fn a_new_request_has_a_stopped_monotonic_timer() {
    let rq = request(0);
    let timer = &rq.data_ref().timer.timer;
    assert_eq!((timer.clock, timer.mode, timer.expiry), (CLOCK_MONOTONIC, 1, None));
}

#[test]
fn a_timer_handle_cancels_and_lets_go() {
    let mut rq = request(2);
    let mut handle = aref().start(&mut rq, Ktime::from_nanos(5));
    assert!(rq.data_ref().timer.timer.expiry.is_some());
    assert!(handle.cancel(&mut rq));
    assert!(!handle.cancel(&mut rq));
    assert_eq!(count(&rq), 2);
    let handle = aref().start(&mut rq, Ktime::from_nanos(6));
    handle.release(&mut rq);
    assert!(rq.data_ref().timer.timer.expiry.is_none());
    assert_eq!(count(&rq), 1);
}

#[test]
fn a_dismissed_handle_leaves_the_timer_running() {
    let mut rq = request(2);
    aref().start(&mut rq, Ktime::from_nanos(6)).dismiss(&mut rq);
    assert_eq!(rq.data_ref().timer.timer.expiry.map(|e| e.tim), Some(6));
    assert_eq!(count(&rq), 1);
}

#[test]
fn the_timer_leads_back_to_the_request_and_ends_it() {
    let mut rq = request(1);
    let layout = RequestLayout { request_size: 256, data_offset: 8, refcount_offset: 0 };
    let wrapper = layout.wrapper_ptr(0x4000);
    assert_eq!(layout.refcount_ptr(wrapper), 0x4100);
    let data = layout.data_ptr(wrapper);
    assert_eq!(data, 0x4108);
    assert_eq!(layout.request_of(data), 0x4000);
    let timer = <rnull::rnull::Pdu as HasHrTimer<NullBlkDevice>>::c_timer_ptr(data);
    let code = <ARef<Request<NullBlkDevice>> as RawHrTimerCallback>::run(timer, layout, &mut rq);
    assert_eq!(code, HRTIMER_NORESTART);
    assert_eq!((rq.state, count(&rq)), (RequestState::Ended(BLK_STS_OK), 0));
}

#[test]
fn a_timer_that_has_fired_is_stopped() {
    let layout = RequestLayout { request_size: 256, data_offset: 8, refcount_offset: 0 };
    let mut rq = request(2);
    aref().start(&mut rq, Ktime::from_nanos(6)).dismiss(&mut rq);
    assert!(rq.data_ref().timer.timer.expiry.is_some());
    let code = HrTimer::<NullBlkDevice>::handler(0x4108, layout, &mut rq);
    assert_eq!(code, HRTIMER_NORESTART);
    assert_eq!((rq.state, count(&rq)), (RequestState::Ended(BLK_STS_OK), 0));
    assert!(rq.data_ref().timer.timer.expiry.is_none());
    assert!(!rq.wrapper.data.timer.raw_cancel());
}

#[test]
fn the_timer_callback_of_the_driver_does_not_restart() {
    let mut rq = request(2);
    let r = <rnull::rnull::Pdu as HrTimerCallback>::run(aref(), &mut rq);
    assert_eq!(r, HrTimerRestart::NoRestart);
    assert_eq!((rq.state, count(&rq)), (RequestState::Ended(BLK_STS_OK), 0));
}

#[test]
fn every_mode_ends_the_request() {
    let layout = RequestLayout { request_size: 256, data_offset: 8, refcount_offset: 0 };
    for mode in [IRQMode::Direct, IRQMode::Soft, IRQMode::Timer] {
        for remote in [false, true] {
            let mut q = QueueData {
                tree: TreeContainer::new(),
                irq_mode: mode,
                completion_time: Ktime::from_nanos(3),
                memory_backed: true,
            };
            let mut rq = request(0);
            let mut grants = Grants { left: 0, refusal: Error(ENOMEM) };
            let unique = URef { obj: &mut rq };
            assert_eq!(NullBlkDevice::queue_rq(&mut q, unique, true, remote, &mut grants), Ok(()));
            if mode == IRQMode::Timer {
                let timer = layout.data_ptr(layout.wrapper_ptr(rq.ptr));
                let code =
                    <ARef<Request<NullBlkDevice>> as RawHrTimerCallback>::run(timer, layout, &mut rq);
                assert_eq!(code, HRTIMER_NORESTART);
            } else if mode == IRQMode::Soft && remote {
                NullBlkDevice::complete(aref(), &mut rq);
            }
            assert_eq!((rq.state, count(&rq)), (RequestState::Ended(BLK_STS_OK), 0));
        }
    }
}

fn race(n: usize, mut order: u32) -> (Vec<bool>, i32) {
    let mut c = Refcount::new(n as i32 + 1);
    let mut steps: Vec<Option<DropStep>> = vec![None; n];
    let mut finished = Vec::new();
    while finished.len() < n {
        order = order.wrapping_mul(1_664_525).wrapping_add(1_013_904_223);
        let i = (order >> 16) as usize % n;
        match steps[i] {
            None => steps[i] = Some(DropStep::exchange(c.load())),
            Some(DropStep::Exchange { current, new }) => {
                let next = DropStep::next(current, c.compare_exchange(current, new));
                steps[i] = Some(next);
                if let DropStep::Done { unique } = next {
                    finished.push(unique);
                }
            }
            Some(DropStep::Done { .. }) => (),
        }
    }
    (finished, c.load())
}

#[test]
fn the_last_of_several_droppers_is_unique() {
    for n in 1..6 {
        for order in 0..200 {
            let (finished, count) = race(n, order);
            let mut expected = vec![false; n - 1];
            expected.push(true);
            assert_eq!((finished, count), (expected, 0));
        }
    }
}

#[test]
fn requests_have_their_own_data() {
    let layout = RequestLayout { request_size: 256, data_offset: 8, refcount_offset: 0 };
    assert_eq!(layout.data_ptr(layout.wrapper_ptr(0x4000)), 0x4108);
    assert_eq!(layout.data_ptr(layout.wrapper_ptr(0x5000)), 0x5108);
    let rq = request(2);
    assert!(core::ptr::eq(rq.data_ref(), rq.data_ref()));
    assert_eq!(count(&rq), 2);
}
